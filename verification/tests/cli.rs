use digital_paper::cli::{
    ensure_connected, print_human, read_configuration, retain_serial, upload_default, CommandKind,
    Report,
};
use digital_paper::domain::DeviceSummary;
use digital_paper::json::{parse_json_or_string, show_json};
use digital_paper::listing::{sort_by_path, EntryWalk};
use digital_paper::domain::{RemoteEntry, RemoteEntryType};

fn s(text: &str) -> String {
    text.to_string()
}

#[test]
fn reports_are_json_objects() {
    for (report, text) in [
        (
            Report::Validated { path: s("p") },
            "{\"action\":\"validate_access\",\"ok\":true,\"path\":\"p\"}",
        ),
        (
            Report::PairBegun { addr: s("a") },
            "{\"addr\":\"a\",\"message\":\"PIN should now be visible on the DPT.\",\"ok\":true}",
        ),
        (
            Report::Exists { path: s("p"), exists: false },
            "{\"exists\":false,\"path\":\"p\"}",
        ),
        (
            Report::IsFolder { path: s("p"), is_folder: true },
            "{\"isFolder\":true,\"path\":\"p\"}",
        ),
        (
            Report::FolderCreated { path: s("p") },
            "{\"action\":\"create_folder\",\"ok\":true,\"path\":\"p\"}",
        ),
        (
            Report::Renamed { path: s("p"), new_name: s("n") },
            "{\"action\":\"rename\",\"newName\":\"n\",\"ok\":true,\"path\":\"p\"}",
        ),
        (
            Report::Moved { src: s("a"), dst: s("b") },
            "{\"action\":\"move\",\"dst\":\"b\",\"ok\":true,\"src\":\"a\"}",
        ),
        (
            Report::Copied { src: s("a"), dst: s("b") },
            "{\"action\":\"copy\",\"dst\":\"b\",\"ok\":true,\"src\":\"a\"}",
        ),
        (
            Report::Deleted { path: s("p") },
            "{\"action\":\"delete\",\"ok\":true,\"path\":\"p\"}",
        ),
        (
            Report::Uploaded { local: s("l"), remote: s("r") },
            "{\"action\":\"upload\",\"localPath\":\"l\",\"ok\":true,\"remotePath\":\"r\"}",
        ),
        (
            Report::Downloaded { remote: s("r"), local: s("l") },
            "{\"action\":\"download\",\"localPath\":\"l\",\"ok\":true,\"remotePath\":\"r\"}",
        ),
        (Report::Text { value: s("v") }, "{\"value\":\"v\"}"),
        (
            Report::WifiAdded { ssid: s("x"), security: s("y") },
            "{\"action\":\"add_wifi\",\"ok\":true,\"security\":\"y\",\"ssid\":\"x\"}",
        ),
        (
            Report::WifiRemoved { ssid: s("x"), security: s("y") },
            "{\"action\":\"remove_wifi\",\"ok\":true,\"security\":\"y\",\"ssid\":\"x\"}",
        ),
        (Report::WifiToggled { enabled: true }, "{\"enabled\":true,\"ok\":true}"),
        (
            Report::Config { key: s("k"), value: parse_json_or_string("[1]") },
            "{\"key\":\"k\",\"value\":[1]}",
        ),
        (
            Report::ConfigSet { key: s("k"), value: parse_json_or_string("x") },
            "{\"action\":\"config_set\",\"key\":\"k\",\"ok\":true,\"value\":\"x\"}",
        ),
        (Report::ConfigFile { path: s("p") }, "{\"ok\":true,\"path\":\"p\"}"),
        (Report::DatetimeSet, "{\"action\":\"set_datetime\",\"ok\":true}"),
        (
            Report::TemplateUploaded { local: s("l"), remote: s("r") },
            "{\"action\":\"upload_template\",\"localPath\":\"l\",\"ok\":true,\"remotePath\":\"r\"}",
        ),
        (
            Report::TemplateDeleted { name: s("n") },
            "{\"action\":\"delete_template\",\"ok\":true,\"templateName\":\"n\"}",
        ),
        (
            Report::DocumentShown { document_id: s("d"), page: 2 },
            "{\"action\":\"display_document\",\"documentId\":\"d\",\"ok\":true,\"page\":2}",
        ),
        (
            Report::Screenshot { path: s("p"), bytes: 9 },
            "{\"bytes\":9,\"ok\":true,\"outputPath\":\"p\"}",
        ),
        (Report::Ping { ok: false }, "{\"ok\":false}"),
        (
            Report::FirmwareUpdated { local: s("l") },
            "{\"action\":\"update_firmware\",\"localPath\":\"l\",\"ok\":true}",
        ),
    ] {
        assert_eq!(report.value().to_string(), text);
    }
}

#[test]
fn lists_are_printed_item_by_item() {
    let items = print_human(&parse_json_or_string("[1,\"a\",{}]"));
    let shown: Vec<String> = items.iter().map(|v| v.to_string()).collect();
    assert_eq!(shown, vec!["1", "\"a\"", "{}"]);
    assert_eq!(print_human(&parse_json_or_string("{}")).len(), 1);
    assert_eq!(print_human(&parse_json_or_string("[]")).len(), 0);
}

fn device(serial: Option<&str>) -> DeviceSummary {
    DeviceSummary {
        id: s("id"),
        serial: serial.map(s),
        name: s("n"),
        reachable_addrs: vec![],
        transport_kinds: vec![],
        paired: false,
    }
}

#[test]
fn devices_are_shown_by_serial_number() {
    let devices = || vec![device(Some("1")), device(None), device(Some("2"))];
    assert_eq!(retain_serial(devices(), &None).len(), 3);
    let some = retain_serial(devices(), &Some(s("2")));
    assert_eq!(some.len(), 1);
    assert_eq!(some[0].serial, Some(s("2")));
    assert!(retain_serial(devices(), &Some(s("3"))).is_empty());
}

#[test]
fn uploads_default_to_the_document_folder() {
    assert_eq!(upload_default(Some(s("r")), &Some(s("n"))), "r");
    assert_eq!(upload_default(None, &Some(s("n.pdf"))), "Document/n.pdf");
    assert_eq!(upload_default(None, &None), "Document/upload.pdf");
}

fn entry(path: &str, size: u64) -> RemoteEntry {
    RemoteEntry {
        path: s(path),
        name: s(path),
        entry_type: RemoteEntryType::Document,
        size: Some(size),
        modified_at: None,
    }
}

#[test]
fn sorting_is_by_path_and_stable() {
    let sorted = sort_by_path(vec![entry("b", 1), entry("a", 2), entry("b", 3), entry("", 4)]);
    let shown: Vec<(String, u64)> = sorted.into_iter().map(|e| (e.path, e.size.unwrap())).collect();
    assert_eq!(
        shown,
        vec![(s(""), 4), (s("a"), 2), (s("b"), 1), (s("b"), 3)]
    );
}

#[test]
fn a_walk_lists_every_folder_it_meets() {
    let folder = |path: &str| RemoteEntry {
        entry_type: RemoteEntryType::Folder,
        ..entry(path, 0)
    };
    let mut walk = EntryWalk::new("D");
    let mut listed = Vec::new();
    while let Some(path) = walk.next() {
        let found = match path.as_str() {
            "D" => vec![folder("D/a"), entry("D/x", 1), folder("D/b")],
            "D/b" => vec![folder("D/b/c")],
            _ => vec![],
        };
        listed.push(path);
        walk.feed(found);
    }
    assert_eq!(listed, vec!["D", "D/b", "D/b/c", "D/a"]);
    let paths: Vec<String> = walk.finish().into_iter().map(|e| e.path).collect();
    assert_eq!(paths, vec!["D/a", "D/b", "D/b/c", "D/x"]);
}

#[test]
fn commands_on_a_device_connect_first() {
    for kind in [
        CommandKind::Discover,
        CommandKind::Connect,
        CommandKind::UsbStatus,
        CommandKind::UsbSwitch,
        CommandKind::UsbRecover,
        CommandKind::PairBegin,
        CommandKind::PairFinish,
        CommandKind::RegisterInfo,
        CommandKind::ApiVersion,
        CommandKind::ImportCredentials,
        CommandKind::Capabilities,
    ] {
        assert!(!ensure_connected(kind, true));
        assert!(!ensure_connected(kind, false));
    }
    for kind in [
        CommandKind::Validate,
        CommandKind::Pair,
        CommandKind::List,
        CommandKind::Upload,
        CommandKind::Sync,
        CommandKind::Ping,
    ] {
        assert!(ensure_connected(kind, false));
    }
    assert!(ensure_connected(CommandKind::Logs, true));
    assert!(!ensure_connected(CommandKind::Logs, false));
}

#[test]
fn configuration_files_are_read() {
    let value = match read_configuration("{\"a\": [1, -2, null]}", "c.json") {
        Ok(value) => value,
        Err(_) => panic!("not read"),
    };
    assert_eq!(show_json(&value), "{\"a\":[1,-2,null]}");
    match read_configuration("{", "c.json") {
        Ok(_) => panic!("read"),
        Err(e) => {
            assert_eq!(e.message, "invalid JSON in c.json");
            assert_eq!(e.cause, "EOF while parsing an object at line 1 column 1");
        }
    }
}

#[test]
fn printed_trees_are_read_back() {
    for text in [
        "null",
        "true",
        "18446744073709551615",
        "-9223372036854775808",
        "\"me\"",
        "\"\\u0000 \\\" \\\\ / \u{1f600}\"",
        "[[],{},[0]]",
        "{\"b\":{\"a\":-1},\"a\":\"x\"}",
    ] {
        let value = parse_json_or_string(text);
        assert!(!value.is_string() || text.starts_with('"'));
        assert_eq!(parse_json_or_string(&show_json(&value)), value);
    }
    let deep = format!("{}0{}", "[".repeat(127), "]".repeat(127));
    let value = parse_json_or_string(&deep);
    assert!(value.is_array());
    assert_eq!(parse_json_or_string(&show_json(&value)), value);
    let too_deep = format!("{}0{}", "[".repeat(128), "]".repeat(128));
    assert_eq!(parse_json_or_string(&too_deep).as_str(), Some(too_deep.as_str()));
    assert_eq!(parse_json_or_string(" a \\n").as_str(), Some(" a \\n"));
}
