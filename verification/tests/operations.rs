use digital_paper::domain::{RemoteEntryType, TransportKind, WifiConfigInput};
use digital_paper::entries::{map_remote_entry, parse_battery_level};
use digital_paper::errors::RustProviderError;
use digital_paper::http::{HttpReply, Method, ReplyBody, Sent};
use digital_paper::json::{parse_json_or_string, value_str};
use digital_paper::pairing::PendingPairing;
use digital_paper::programs::{
    import_path, import_target_below, resolve_endpoint, resolve_failure, sync_report_value,
    Answer, Ask, Given, LocalFile, LocalKind, ResolveEntry, Run,
};
use digital_paper::provider::{
    debug_line, find_credentials_in_folder, ConnectHistory, ConnectStep,
    CredentialSource, Finished, PairHistory, PairingStep, RustNativeProvider, SessionNeed,
    StoredCredentials, WalkedFile,
};
use digital_paper::requests::{add_wifi_full, chrono_like_now_utc};
use digital_paper::session::{ApiCall, ApiValue, Session};
use serde_json::Value;
use std::collections::HashMap;

fn json(text: &str) -> Value {
    parse_json_or_string(text)
}

fn show(ask: &Ask) -> String {
    match ask {
        Ask::Resolve(path) => format!("resolve {}", path),
        Ask::Upload(local, remote) => format!("upload {} {}", local, remote),
        Ask::Call(ApiCall::GetJson(e)) => format!("get {}", e),
        Ask::Call(ApiCall::PostJson(e, v)) => format!("post {} {}", e, v),
        Ask::Call(ApiCall::PutJson(e, v)) => format!("put {} {}", e, v),
        Ask::Call(ApiCall::GetBytes(e)) => format!("bytes {}", e),
        Ask::Call(ApiCall::PutFile(e, n)) => format!("file {} {}", e, n),
        Ask::Call(ApiCall::Delete(e)) => format!("delete {}", e),
    }
}

struct Device {
    entries: HashMap<String, (String, String)>,
    replies: HashMap<String, Value>,
    log: Vec<String>,
}

impl Device {
    fn new(entries: &[(&str, &str)]) -> Device {
        Device {
            entries: entries
                .iter()
                .map(|(path, kind)| {
                    (
                        (*path).to_string(),
                        (format!("id-{}", path), (*kind).to_string()),
                    )
                })
                .collect(),
            replies: HashMap::new(),
            log: Vec::new(),
        }
    }

    fn answer(&mut self, ask: &Ask) -> Answer {
        let line = show(ask);
        self.log.push(line.clone());
        match ask {
            Ask::Resolve(path) => match self.entries.get(path) {
                Some((id, kind)) => Ok(Given::Entry(ResolveEntry {
                    entry_id: id.clone(),
                    entry_type: kind.clone(),
                })),
                None => Err(RustProviderError::DeviceNotFound),
            },
            Ask::Upload(_, _) => Ok(Given::Value(ApiValue::Nothing)),
            Ask::Call(ApiCall::GetBytes(_)) => Ok(Given::Value(ApiValue::Bytes(vec![1, 2, 3]))),
            Ask::Call(ApiCall::PostJson(endpoint, value)) if endpoint == "/folders2" => {
                let parent = value.get("parent_folder_id").unwrap().as_str().unwrap();
                let name = value.get("folder_name").unwrap().as_str().unwrap();
                let path = format!("{}/{}", &parent[3..], name);
                self.entries
                    .insert(path.clone(), (format!("id-{}", path), "folder".to_string()));
                Ok(Given::Value(ApiValue::Json(json("{}"))))
            }
            Ask::Call(ApiCall::PutFile(_, _)) | Ask::Call(ApiCall::Delete(_)) => {
                Ok(Given::Value(ApiValue::Nothing))
            }
            Ask::Call(ApiCall::GetJson(endpoint))
            | Ask::Call(ApiCall::PostJson(endpoint, _))
            | Ask::Call(ApiCall::PutJson(endpoint, _)) => Ok(Given::Value(ApiValue::Json(
                self.replies.get(endpoint).cloned().unwrap_or(json("{}")),
            ))),
        }
    }

    fn run<T>(&mut self, step: impl Fn(&Vec<Answer>) -> Run<T>) -> Result<T, RustProviderError> {
        let mut answers: Vec<Answer> = Vec::new();
        loop {
            match step(&answers) {
                Run::Ask(ask) => {
                    let answer = self.answer(&ask);
                    answers.push(answer);
                }
                Run::Failed(e) => return Err(e),
                Run::Done(value, n) => {
                    assert_eq!(n, answers.len());
                    return Ok(value);
                }
            }
        }
    }
}

fn internal<T>(result: Result<T, RustProviderError>) -> String {
    match result {
        Err(RustProviderError::Internal(message)) => message,
        Err(other) => panic!("{:?}", other),
        Ok(_) => panic!("no failure"),
    }
}

#[test]
fn folders_are_created_from_the_first_that_is_there() {
    let mut device = Device::new(&[("Document", "folder")]);
    device
        .run(|a| RustNativeProvider::create_folder("Document/a/b", a))
        .unwrap();
    assert_eq!(
        device.log,
        vec![
            "resolve Document/a/b",
            "resolve Document/a",
            "resolve Document",
            "resolve Document",
            "post /folders2 {\"folder_name\":\"a\",\"parent_folder_id\":\"id-Document\"}",
            "resolve Document/a",
            "post /folders2 {\"folder_name\":\"b\",\"parent_folder_id\":\"id-Document/a\"}",
        ]
    );
}

#[test]
fn nothing_is_created_at_the_top_or_where_a_folder_is() {
    let mut device = Device::new(&[("Document", "folder")]);
    device.run(|a| RustNativeProvider::create_folder("", a)).unwrap();
    assert!(device.log.is_empty());
    device.run(|a| RustNativeProvider::create_folder("Document", a)).unwrap();
    device.run(|a| RustNativeProvider::create_folder("Other", a)).unwrap();
    assert_eq!(device.log, vec!["resolve Document", "resolve Other"]);
}

#[test]
fn uploads_go_into_folders_under_the_local_name() {
    let mut device = Device::new(&[("Document", "folder")]);
    device
        .replies
        .insert("/documents2".to_string(), json("{\"document_id\":\"d1\"}"));
    let name = Some("x.pdf".to_string());
    let target = device
        .run(|a| RustNativeProvider::upload("Document", &name, a))
        .unwrap();
    assert_eq!(target, "Document/x.pdf");
    assert_eq!(
        device.log,
        vec![
            "resolve Document",
            "resolve Document/x.pdf",
            "resolve Document",
            "resolve Document",
            "post /documents2 {\"document_source\":\"\",\"file_name\":\"x.pdf\",\"parent_folder_id\":\"id-Document\"}",
            "file /documents/d1/file x.pdf",
        ]
    );
}

#[test]
fn uploads_overwrite_documents() {
    let mut device = Device::new(&[("Document/x.pdf", "document")]);
    let target = device
        .run(|a| RustNativeProvider::upload("Document/x.pdf", &None, a))
        .unwrap();
    assert_eq!(target, "Document/x.pdf");
    assert_eq!(
        device.log,
        vec![
            "resolve Document/x.pdf",
            "resolve Document/x.pdf",
            "file /documents/id-Document/x.pdf/file x.pdf",
        ]
    );
}

#[test]
fn uploads_that_fail() {
    let mut device = Device::new(&[("Document", "folder")]);
    assert_eq!(
        internal(device.run(|a| RustNativeProvider::upload("Document/", &None, a))),
        "invalid local filename"
    );
    assert_eq!(
        internal(device.run(|a| RustNativeProvider::upload("Document/y.pdf", &None, a))),
        "missing document_id from create"
    );
    let refused: Vec<Answer> = vec![Err(RustProviderError::AuthFailed)];
    assert!(matches!(
        RustNativeProvider::upload("Document", &None, &refused),
        Run::Failed(RustProviderError::AuthFailed)
    ));
}

#[test]
fn downloads_are_of_documents_only() {
    let mut device = Device::new(&[("Document", "folder"), ("Document/x.pdf", "document")]);
    let data = device
        .run(|a| RustNativeProvider::download("Document/x.pdf", a))
        .unwrap();
    assert_eq!(data, vec![1, 2, 3]);
    assert_eq!(device.log[1], "bytes /documents/id-Document/x.pdf/file");
    assert_eq!(
        internal(device.run(|a| RustNativeProvider::download("Document", a))),
        "download target is not document"
    );
    assert!(matches!(
        device.run(|a| RustNativeProvider::download("nope", a)),
        Err(RustProviderError::DeviceNotFound)
    ));
    let wrong: Vec<Answer> = vec![Ok(Given::Value(ApiValue::Nothing))];
    assert!(matches!(
        RustNativeProvider::download("x", &wrong),
        Run::Failed(RustProviderError::Internal(_))
    ));
}

#[test]
fn entries_are_deleted_where_they_live() {
    let mut device = Device::new(&[("a", "folder"), ("b", "document")]);
    device.run(|a| RustNativeProvider::delete("a", a)).unwrap();
    device.run(|a| RustNativeProvider::delete("b", a)).unwrap();
    assert_eq!(
        device.log,
        vec!["resolve a", "delete /folders/id-a", "resolve b", "delete /documents/id-b"]
    );
}

#[test]
fn moves_go_into_folders_or_to_new_names() {
    let mut device = Device::new(&[("d", "folder"), ("d/x", "document"), ("e", "folder")]);
    device
        .run(|a| RustNativeProvider::move_entry("d/x", "e", a))
        .unwrap();
    assert_eq!(
        device.log.pop().unwrap(),
        "put /documents/id-d/x {\"parent_folder_id\":\"id-e\"}"
    );
    device
        .run(|a| RustNativeProvider::move_entry("d/x", "e/y", a))
        .unwrap();
    assert_eq!(
        device.log.pop().unwrap(),
        "put /documents/id-d/x {\"file_name\":\"y\",\"parent_folder_id\":\"id-e\"}"
    );
    device
        .run(|a| RustNativeProvider::rename_entry("d/x", "z", a))
        .unwrap();
    assert_eq!(
        device.log.pop().unwrap(),
        "put /documents/id-d/x {\"file_name\":\"z\",\"parent_folder_id\":\"id-d\"}"
    );
    let mut device = Device::new(&[("d", "folder"), ("d/f", "folder")]);
    device
        .run(|a| RustNativeProvider::rename_entry("d/f", "g", a))
        .unwrap();
    assert_eq!(
        device.log.pop().unwrap(),
        "put /folders/id-d/f {\"folder_name\":\"g\",\"parent_folder_id\":\"id-d\"}"
    );
}

#[test]
fn copies_make_sure_of_the_folder() {
    let mut device = Device::new(&[("d", "folder"), ("d/x", "document"), ("d/w", "document")]);
    device
        .run(|a| RustNativeProvider::copy_entry("d/x", "d", a))
        .unwrap();
    assert_eq!(
        device.log.pop().unwrap(),
        "post /documents/id-d/x/copy {\"parent_folder_id\":\"id-d\"}"
    );
    device
        .run(|a| RustNativeProvider::copy_entry("d/x", "d/w", a))
        .unwrap();
    assert_eq!(
        device.log.pop().unwrap(),
        "post /documents/id-d/x/copy {\"file_name\":\"w\",\"parent_folder_id\":\"id-d\"}"
    );
    device.log.clear();
    device
        .run(|a| RustNativeProvider::copy_entry("d/x", "d/new/y", a))
        .unwrap();
    assert_eq!(
        device.log,
        vec![
            "resolve d/x",
            "resolve d/new/y",
            "resolve d/new",
            "resolve d",
            "resolve d",
            "post /folders2 {\"folder_name\":\"new\",\"parent_folder_id\":\"id-d\"}",
            "resolve d/new",
            "post /documents/id-d/x/copy {\"file_name\":\"y\",\"parent_folder_id\":\"id-d/new\"}",
        ]
    );
}

#[test]
fn existence_and_folders() {
    let mut device = Device::new(&[("d", "folder"), ("x", "document")]);
    assert!(device.run(|a| RustNativeProvider::path_exists("d", a)).unwrap());
    assert!(!device.run(|a| RustNativeProvider::path_exists("n", a)).unwrap());
    assert!(device.run(|a| RustNativeProvider::path_is_folder_public("d", a)).unwrap());
    assert!(device.run(|a| RustNativeProvider::path_is_folder_public("n/", a)).unwrap());
    assert!(!device.run(|a| RustNativeProvider::path_is_folder_public("x", a)).unwrap());
    assert!(!device.run(|a| RustNativeProvider::path_is_folder_public("n", a)).unwrap());
    let failed: Vec<Answer> = vec![Err(RustProviderError::TransportUnreachable)];
    assert!(matches!(
        RustNativeProvider::path_exists("d", &failed),
        Run::Failed(RustProviderError::TransportUnreachable)
    ));
}

#[test]
fn device_status_is_read_from_five_replies() {
    let mut device = Device::new(&[]);
    for (endpoint, text) in [
        ("/system/status/battery", "{\"level\":\"88\",\"plugged\":\"usb\"}"),
        ("/system/status/storage", "{\"total\":100,\"free\":\"7\"}"),
        ("/system/status/firmware_version", "{\"value\":\"1.6\"}"),
        ("/system/configs/owner", "{\"value\":5}"),
        ("/system/configs/wifi", "{\"value\":\"on\"}"),
    ] {
        device.replies.insert(endpoint.to_string(), json(text));
    }
    let status = device.run(|a| RustNativeProvider::device_info(a)).unwrap();
    assert_eq!(status.battery.level_percent, Some(88));
    assert!(status.battery.charging);
    assert_eq!(status.storage.total_bytes, Some(100));
    assert_eq!(status.storage.free_bytes, None);
    assert_eq!(status.firmware_version, Some("1.6".to_string()));
    assert_eq!(status.owner, None);
    assert!(status.wifi_enabled);
    assert_eq!(device.log.len(), 5);
}

#[test]
fn battery_levels() {
    for (text, level) in [
        ("{\"remain\":55}", Some(55)),
        ("{\"remain\":300,\"level\":\"9\"}", Some(9)),
        ("{\"remain\":-1}", None),
        ("{\"level\":\"256\"}", None),
        ("{\"level\":7}", None),
        ("[]", None),
    ] {
        assert_eq!(parse_battery_level(&json(text)), level, "{}", text);
    }
}

#[test]
fn templates() {
    let mut device = Device::new(&[]);
    device.replies.insert(
        "/viewer/configs/note_templates".to_string(),
        json("{\"note_template_id\":\"t1\",\"template_list\":[{\"template_name\":\"a\",\"note_template_id\":\"ta\"},{\"template_name\":\"b\"}]}"),
    );
    device
        .run(|a| RustNativeProvider::upload_template("x/new.pdf", a))
        .unwrap();
    assert_eq!(
        device.log,
        vec![
            "post /viewer/configs/note_templates {\"document_source\":\"\",\"templateName\":\"new.pdf\"}",
            "file /viewer/configs/note_templates/t1/file new.pdf",
        ]
    );
    device
        .run(|a| RustNativeProvider::delete_template("a", a))
        .unwrap();
    assert_eq!(
        device.log.pop().unwrap(),
        "delete /viewer/configs/note_templates/ta"
    );
    for name in ["b", "c"] {
        assert!(matches!(
            device.run(|a| RustNativeProvider::delete_template(name, a)),
            Err(RustProviderError::DeviceNotFound)
        ));
    }
    let mut empty = Device::new(&[]);
    assert_eq!(
        internal(empty.run(|a| RustNativeProvider::upload_template("x", a))),
        "missing note_template_id"
    );
}

#[test]
fn firmware_is_installed_after_the_check() {
    let mut device = Device::new(&[]);
    assert_eq!(
        internal(device.run(|a| RustNativeProvider::update_firmware(a))),
        "firmware precheck failed: {}"
    );
    device.replies.insert(
        "/system/controls/update_firmware/precheck".to_string(),
        json("{\"battery\":\"ok\",\"image_file\":\"ok\"}"),
    );
    device.log.clear();
    device.run(|a| RustNativeProvider::update_firmware(a)).unwrap();
    assert_eq!(
        device.log,
        vec![
            "file /system/controls/update_firmware/file FwUpdater.pkg",
            "get /system/controls/update_firmware/precheck",
            "put /system/controls/update_firmware {}",
        ]
    );
}

fn local(path: &str, relative: &str) -> LocalFile {
    LocalFile {
        path: path.to_string(),
        relative: relative.to_string(),
    }
}

#[test]
fn synchronising_uploads_what_is_missing() {
    let mut device = Device::new(&[("D", "folder")]);
    device.replies.insert(
        "/documents2?entry_type=all&fields=entry_path,entry_type,modified_date,file_size".to_string(),
        json("{\"entry_list\":[{\"entry_path\":\"D/a.pdf\",\"entry_type\":\"document\"},{\"entry_path\":\"D/b.pdf\",\"entry_type\":\"folder\"}]}"),
    );
    let files = vec![
        local("/l/a.pdf", "a.pdf"),
        local("/l/b.pdf", "b.pdf"),
        local("/l/s\\c.pdf", "s\\c.pdf"),
    ];
    let report = device
        .run(|a| RustNativeProvider::sync_folder(&files, "D/", a))
        .unwrap();
    assert_eq!(report.uploaded, vec!["D/b.pdf", "D/s/c.pdf"]);
    assert_eq!(report.skipped, vec!["D/a.pdf"]);
    assert_eq!(report.uploaded.len() + report.skipped.len(), files.len());
    assert_eq!(
        sync_report_value(&report).to_string(),
        "{\"conflicts\":[\"D/a.pdf\"],\"skipped\":[\"D/a.pdf\"],\"uploaded\":[\"D/b.pdf\",\"D/s/c.pdf\"]}"
    );
    assert_eq!(device.log.last().unwrap(), "upload /l/s\\c.pdf D/s/c.pdf");
}

#[test]
fn import_targets() {
    let plan = |kind: LocalKind, folder: &str| -> Result<Vec<(String, String)>, String> {
        import_path("/l", &kind, folder)
            .map(|list| list.into_iter().map(|p| (p.local, p.remote)).collect())
    };
    let pair = |a: &str, b: &str| (a.to_string(), b.to_string());
    assert_eq!(
        plan(LocalKind::File(Some("n".to_string())), "D/"),
        Ok(vec![pair("/l", "D/n")])
    );
    assert_eq!(plan(LocalKind::File(None), "D"), Ok(vec![pair("/l", "D/upload.pdf")]));
    assert_eq!(
        plan(LocalKind::Folder(vec![local("/l/x", "x"), local("/l/a\\b", "a\\b")]), "D"),
        Ok(vec![pair("/l/x", "D/x"), pair("/l/a\\b", "D/a/b")])
    );
    assert_eq!(
        plan(LocalKind::Missing, "D"),
        Err("local path does not exist".to_string())
    );
    assert_eq!(import_target_below("D", &local("", "a\\b")), "D/a/b");
}

#[test]
fn paths_are_resolved_at_their_endpoint() {
    assert_eq!(resolve_endpoint("D/a b"), "/resolve/entry/path/D%2Fa+b");
    assert_eq!(
        resolve_failure("p", "why").text(),
        "internal error: resolve object parse failed for p: why"
    );
}

#[test]
fn listings() {
    let value = json("{\"entry_list\":[{\"entry_path\":\"D\",\"entry_type\":\"folder\"},{\"entry_path\":\"D/a\",\"entry_type\":\"document\",\"file_size\":\"12\",\"modified_date\":\"m\"},{\"entry_path\":\"D/f\",\"entry_type\":\"folder\",\"file_size\":3},{\"entry_path\":\"D/f/b\"},{\"x\":1}]}");
    let paths: Vec<String> = RustNativeProvider::list_entries(&value, "D/")
        .into_iter()
        .map(|e| e.path)
        .collect();
    assert_eq!(paths, vec!["D/a", "D/f"]);
    let all = RustNativeProvider::list_all_entries(&value);
    assert_eq!(all.len(), 5);
    assert_eq!(all[1].name, "a");
    assert_eq!(all[1].size, Some(12));
    assert_eq!(all[1].modified_at, Some("m".to_string()));
    assert_eq!(all[2].size, Some(3));
    assert_eq!(all[3].entry_type, RemoteEntryType::Unknown);
    assert_eq!(all[4].path, "");
    let documents = RustNativeProvider::list_document_entries(all);
    assert_eq!(documents.len(), 1);
    assert_eq!(documents[0].path, "D/a");
    let entry = map_remote_entry(&json("{\"entry_path\":\"x\",\"file_size\":\"-1\"}"));
    assert_eq!(entry.size, None);
    assert!(RustNativeProvider::list_entries(&json("{}"), "D").is_empty());
}

#[test]
fn members_that_are_missing_are_named() {
    assert_eq!(value_str(&json("{\"a\":\"x\"}"), "a").unwrap(), "x");
    assert_eq!(internal(value_str(&json("{\"a\":1}"), "a")), "missing a");
}

#[test]
fn networks_are_listed_by_their_decoded_names() {
    let value = json("{\"aplist\":[{\"ssid\":\"SG9tZQ==\",\"security\":\"psk\",\"connected\":\"on\"},{\"ssid\":\"!\",\"connected\":true},{}]}");
    let known = RustNativeProvider::list_wifi(&value);
    assert_eq!(known[0].ssid, "Home");
    assert_eq!(known[0].id, Some("Home|psk".to_string()));
    assert!(known[0].connected);
    assert_eq!(known[1].ssid, "");
    assert!(known[1].connected);
    assert!(!known[2].connected);
    assert!(RustNativeProvider::scan_wifi(&value).iter().all(|n| !n.connected));
    let call = RustNativeProvider::add_wifi("Home", "psk", "pw");
    assert_eq!(
        show(&Ask::Call(call)),
        "put /system/controls/wifi_accesspoints/register {\"dhcp\":\"true\",\"dns1\":\"\",\"dns2\":\"\",\"gateway\":\"\",\"network_mask\":\"\",\"passwd\":\"pw\",\"proxy\":\"false\",\"security\":\"psk\",\"ssid\":\"SG9tZQ==\",\"static_address\":\"\"}"
    );
    let full = WifiConfigInput {
        ssid: "a".to_string(),
        security: "s".to_string(),
        passwd: "p".to_string(),
        dhcp: "false".to_string(),
        static_address: "1".to_string(),
        gateway: "2".to_string(),
        network_mask: "3".to_string(),
        dns1: "4".to_string(),
        dns2: "5".to_string(),
        proxy: "true".to_string(),
    };
    assert_eq!(
        show(&Ask::Call(add_wifi_full(&full))),
        "put /system/controls/wifi_accesspoints/register {\"dhcp\":\"false\",\"dns1\":\"4\",\"dns2\":\"5\",\"gateway\":\"2\",\"network_mask\":\"3\",\"passwd\":\"p\",\"proxy\":\"true\",\"security\":\"s\",\"ssid\":\"YQ==\",\"static_address\":\"1\"}"
    );
}

#[test]
fn single_calls() {
    let show = |call| show(&Ask::Call(call));
    assert_eq!(
        show(RustNativeProvider::remove_wifi("h", "psk")),
        "delete /system/configs/wifi_accesspoints/h/psk"
    );
    let (call, line) = RustNativeProvider::toggle_wifi(true);
    assert_eq!(show(call), "put /system/configs/wifi {\"value\":\"on\"}");
    assert_eq!(line, "Wi-Fi toggled on");
    assert_eq!(
        show(RustNativeProvider::toggle_wifi(false).0),
        "put /system/configs/wifi {\"value\":\"off\"}"
    );
    assert_eq!(show(RustNativeProvider::get_config()), "get /system/configs/");
    assert_eq!(show(RustNativeProvider::get_config_value("k")), "get /system/configs/k");
    let (call, line) = RustNativeProvider::set_config_value("k", json("[1]"));
    assert_eq!(show(call), "put /system/configs/k [1]");
    assert_eq!(line, "Config updated for k");
    assert_eq!(
        show(RustNativeProvider::set_datetime_now("t")),
        "put /system/configs/datetime {\"value\":\"t\"}"
    );
    let (call, line) = RustNativeProvider::display_document("d", 3);
    assert_eq!(
        show(call),
        "put /viewer/controls/open2 {\"document_id\":\"d\",\"page\":3}"
    );
    assert_eq!(line, "Display requested for document d page 3");
    assert_eq!(
        show(RustNativeProvider::take_screenshot()),
        "bytes /system/controls/screen_shot2?query=jpeg"
    );
    assert_eq!(
        show(RustNativeProvider::scan_wifi_call()),
        "post /system/controls/wifi_accesspoints/scan {}"
    );
    assert_eq!(
        show(RustNativeProvider::list_wifi_call()),
        "get /system/configs/wifi_accesspoints"
    );
    assert_eq!(show(RustNativeProvider::battery_info()), "get /system/status/battery");
    assert_eq!(
        show(RustNativeProvider::list_templates()),
        "get /viewer/configs/note_templates"
    );
    assert_eq!(
        show(RustNativeProvider::firmware_version()),
        "get /system/status/firmware_version"
    );
    assert_eq!(show(RustNativeProvider::mac_address()), "get /system/status/mac_address");
    assert_eq!(
        RustNativeProvider::read_firmware_version(&json("{\"value\":\"1\"}")).unwrap(),
        "1"
    );
    assert_eq!(
        internal(RustNativeProvider::read_firmware_version(&json("{}"))),
        "missing firmware version"
    );
    assert_eq!(
        internal(RustNativeProvider::read_mac_address(&json("{}"))),
        "missing mac address"
    );
}

fn reply(code: u16, status: &str, body: &str) -> Sent {
    Ok(HttpReply {
        code,
        status: status.to_string(),
        headers: String::new(),
        cookies: Vec::new(),
        body: ReplyBody::Text(body.to_string()),
    })
}

#[test]
fn registration_interface() {
    let request = RustNativeProvider::register_info("h");
    assert_eq!(request.method, Method::Get);
    assert_eq!(request.url, "http://h:8080/register/information");
    assert_eq!(RustNativeProvider::api_version("h").url, "http://h:8080/api_version");
    assert_eq!(
        RustNativeProvider::read_register_info(&reply(200, "200 OK", "{\"a\":1}"))
            .unwrap()
            .to_string(),
        "{\"a\":1}"
    );
    assert_eq!(
        internal(RustNativeProvider::read_register_info(&reply(500, "500 X", "b"))),
        "register information http error: status=500 X body=b"
    );
    assert!(internal(RustNativeProvider::read_register_info(&reply(200, "200 OK", "b")))
        .starts_with("register info parse failed: "));
    assert!(matches!(
        RustNativeProvider::read_register_info(&Err("x".to_string())),
        Err(RustProviderError::TransportUnreachable)
    ));
    assert_eq!(
        RustNativeProvider::read_api_version(&reply(200, "200 OK", "{\"value\":\"1.3\"}")).unwrap(),
        "1.3"
    );
    assert_eq!(
        internal(RustNativeProvider::read_api_version(&reply(200, "200 OK", "{}"))),
        "missing api version"
    );
    assert_eq!(
        internal(RustNativeProvider::read_api_version(&reply(404, "404 N", "b"))),
        "api version http error: status=404 N body=b"
    );
}

#[test]
fn pinging() {
    let session = Session {
        addr: "h".to_string(),
        cookie: "c".to_string(),
    };
    assert_eq!(RustNativeProvider::ping(&session).url, "https://h:8443/ping");
    assert!(RustNativeProvider::read_ping(&reply(204, "", "")).unwrap());
    assert!(!RustNativeProvider::read_ping(&reply(401, "", "")).unwrap());
    assert!(RustNativeProvider::read_ping(&Err("x".to_string())).is_err());
}

#[test]
fn the_clock_falls_back_to_1970() {
    assert_eq!(
        chrono_like_now_utc(&Some(" 2026-03-13T00:00:00Z\n".to_string())),
        "2026-03-13T00:00:00Z"
    );
    assert_eq!(chrono_like_now_utc(&Some(" \n".to_string())), "1970-01-01T00:00:00Z");
    assert_eq!(chrono_like_now_utc(&None), "1970-01-01T00:00:00Z");
}

#[test]
fn the_log_keeps_two_hundred_lines() {
    let mut provider = RustNativeProvider::new();
    assert!(provider.read_logs().is_empty());
    for i in 0..205 {
        provider.log("9", &format!("line {}", i));
    }
    let logs = provider.read_logs();
    assert_eq!(logs.len(), 200);
    assert_eq!(logs[0].message, "line 5");
    assert_eq!(logs[0].id, "6");
    assert_eq!(logs[199].message, "line 204");
    assert_eq!(logs[199].id, "201");
    assert_eq!(logs[199].timestamp, "9");
}

fn stored(client: Option<&str>, key: Option<&str>) -> StoredCredentials {
    StoredCredentials {
        client_id: client.map(str::to_string),
        private_key: key.map(str::to_string),
    }
}

fn pending(addr: &str) -> PendingPairing {
    PendingPairing {
        addr: addr.to_string(),
        n1: vec![],
        n2: vec![],
        auth_key: vec![],
        key_wrap_key: vec![],
        yb: vec![],
        ya: vec![],
        e_hash: vec![],
        m3hmac: vec![],
    }
}

fn session(addr: &str) -> Session {
    Session {
        addr: addr.to_string(),
        cookie: "c".to_string(),
    }
}

#[test]
fn sessions_are_opened_where_none_is() {
    let mut provider = RustNativeProvider::new();
    assert!(matches!(
        provider.require_session(&stored(Some("c"), Some("k"))),
        SessionNeed::Failed(RustProviderError::PairingRequired)
    ));
    assert_eq!(provider.resolve_target_addr(None), "digitalpaper.local");
    provider.connected("h", None);
    assert_eq!(provider.resolve_target_addr(None), "h");
    assert_eq!(provider.resolve_target_addr(Some("i".to_string())), "i");
    match provider.require_session(&stored(Some("c"), Some("k"))) {
        SessionNeed::Login(addr, client, key) => {
            assert_eq!((addr.as_str(), client.as_str(), key.as_str()), ("h", "c", "k"));
        }
        _ => panic!("no login"),
    }
    assert!(matches!(
        provider.require_session(&stored(Some("c"), None)),
        SessionNeed::Failed(RustProviderError::PairingRequired)
    ));
    provider.refreshed("j", session("j"));
    assert_eq!(provider.selected_addr, Some("j".to_string()));
    match provider.require_session(&stored(None, None)) {
        SessionNeed::Have(session) => assert_eq!(session.addr, "j"),
        _ => panic!("no session"),
    }
}

#[test]
fn connecting_probes_and_logs_in() {
    let mut h = ConnectHistory {
        discovered: None,
        probed: None,
        login: None,
    };
    assert!(matches!(
        RustNativeProvider::connect(&None, None, &h),
        ConnectStep::Discover
    ));
    h.discovered = Some(Err(RustProviderError::DeviceNotFound));
    assert!(matches!(
        RustNativeProvider::connect(&None, None, &h),
        ConnectStep::Failed(RustProviderError::DeviceNotFound)
    ));
    h.discovered = Some(Ok(vec![]));
    assert!(matches!(
        RustNativeProvider::connect(&None, None, &h),
        ConnectStep::Failed(RustProviderError::DeviceNotFound)
    ));
    let addr = Some("1.2.3.4".to_string());
    match RustNativeProvider::connect(&addr, None, &h) {
        ConnectStep::Probe(target) => assert_eq!(target, "1.2.3.4"),
        _ => panic!("no probe"),
    }
    h.probed = Some(false);
    assert!(matches!(
        RustNativeProvider::connect(&addr, None, &h),
        ConnectStep::Failed(RustProviderError::TransportUnreachable)
    ));
    let default = Some("digitalpaper.local".to_string());
    assert!(matches!(
        RustNativeProvider::connect(&default, None, &h),
        ConnectStep::Login(_)
    ));
    h.login = Some(None);
    match RustNativeProvider::connect(&default, Some(TransportKind::Manual), &h) {
        ConnectStep::Done(device) => {
            assert_eq!(device.id, "rust-digitalpaper.local");
            assert_eq!(device.name, "Sony Digital Paper");
            assert_eq!(device.transport_kinds, vec![TransportKind::Manual]);
            assert!(!device.paired);
        }
        _ => panic!("not connected"),
    }
    h.probed = Some(true);
    h.login = Some(Some(session("1.2.3.4")));
    match RustNativeProvider::connect(&addr, None, &h) {
        ConnectStep::Done(device) => {
            assert_eq!(device.name, "Sony Digital Paper (1.2.3.4)");
            assert_eq!(device.reachable_addrs, vec!["1.2.3.4"]);
            assert_eq!(device.transport_kinds, vec![TransportKind::Wifi]);
            assert_eq!(device.serial, None);
            assert!(device.paired);
        }
        _ => panic!("not connected"),
    }
    assert_eq!(
        RustNativeProvider::connected_message("h", true),
        "Connected to h (paired=true)"
    );
    assert_eq!(
        RustNativeProvider::connected_message("h", false),
        "Connected to h (paired=false)"
    );
}

#[test]
fn pairing_with_a_pin() {
    let mut provider = RustNativeProvider::new();
    assert!(matches!(provider.begin_pair(), Err(RustProviderError::PairingRequired)));
    let mut h = PairHistory {
        saved: None,
        begun: None,
        finished: None,
        stored: None,
        login: None,
    };
    assert!(matches!(
        provider.pair("123", &h),
        PairingStep::Failed(RustProviderError::PinInvalid)
    ));
    let pin = "12345678";
    assert!(matches!(provider.pair(pin, &h), PairingStep::ReadSaved));
    h.saved = Some(Ok(None));
    assert!(matches!(provider.pair(pin, &h), PairingStep::Begin));
    h.begun = Some(Err(RustProviderError::AuthFailed));
    assert!(matches!(
        provider.pair(pin, &h),
        PairingStep::Failed(RustProviderError::AuthFailed)
    ));
    h.saved = Some(Ok(Some(pending("s"))));
    match provider.pair(pin, &h) {
        PairingStep::Finish(p) => assert_eq!(p.addr, "s"),
        _ => panic!("not finished"),
    }
    assert_eq!(
        provider.begin_pair_for_address("m", pending("m")),
        "PIN requested for m"
    );
    match provider.pair(pin, &h) {
        PairingStep::Finish(p) => assert_eq!(p.addr, "m"),
        _ => panic!("not finished"),
    }
    h.finished = Some(Ok(("id".to_string(), "key".to_string())));
    match provider.pair(pin, &h) {
        PairingStep::Store(id, key) => assert_eq!((id.as_str(), key.as_str()), ("id", "key")),
        _ => panic!("not stored"),
    }
    h.stored = Some(Ok(()));
    match provider.pair(pin, &h) {
        PairingStep::Login(addr, id, key) => {
            assert_eq!((addr.as_str(), id.as_str(), key.as_str()), ("m", "id", "key"));
        }
        _ => panic!("no login"),
    }
    h.login = Some(Ok(session("m")));
    match provider.pair(pin, &h) {
        PairingStep::Done(device, session) => {
            assert!(device.paired);
            assert_eq!(device.name, "Sony Digital Paper (m)");
            provider.paired(session);
        }
        _ => panic!("not done"),
    }
    assert!(provider.pending_pairing.is_none());
    assert_eq!(provider.session.unwrap().addr, "m");
}

#[test]
fn credential_files() {
    let some = |s: &str| Some(s.to_string());
    match RustNativeProvider::import_credentials(some("f"), some("d"), some("k")) {
        Ok(CredentialSource::Files(d, k)) => assert_eq!((d.as_str(), k.as_str()), ("d", "k")),
        _ => panic!("no files"),
    }
    match RustNativeProvider::import_credentials(some("f"), some("d"), None) {
        Ok(CredentialSource::Folder(f)) => assert_eq!(f, "f"),
        _ => panic!("no folder"),
    }
    assert_eq!(
        internal(RustNativeProvider::import_credentials(None, None, some("k"))),
        "provide sony_app_folder or both credential file paths"
    );
    let file = |name: &str, path: &str| WalkedFile {
        name: name.to_string(),
        path: path.to_string(),
    };
    let walk = vec![
        file("deviceid.dat", "a"),
        file("other", "o"),
        file("deviceid.dat", "b"),
        file("privatekey.dat", "k"),
        file("privatekey.dat", "late"),
        file("deviceid.dat", "late"),
    ];
    assert_eq!(
        find_credentials_in_folder(&walk).unwrap(),
        ("b".to_string(), "k".to_string())
    );
    assert_eq!(
        internal(find_credentials_in_folder(&vec![file("deviceid.dat", "a")])),
        "credentials not found in provided folder"
    );
}

#[test]
fn log_lines() {
    let s = |t: &str| t.to_string();
    for (finished, line) in [
        (Finished::Uploaded { local: s("l"), target: s("t") }, "Uploaded l -> t"),
        (Finished::Downloaded { remote: s("r"), local: s("l") }, "Downloaded r -> l"),
        (Finished::Deleted { path: s("p") }, "Deleted p"),
        (Finished::Moved { src: s("a"), dst: s("b") }, "Moved a -> b"),
        (Finished::FolderCreated { path: s("p") }, "Created folder p"),
        (Finished::Copied { src: s("a"), dst: s("b") }, "Copied a -> b"),
        (Finished::WifiAdded, "Wi-Fi network added"),
        (Finished::WifiRemoved, "Wi-Fi network removed"),
        (Finished::DatetimeSet, "Device datetime updated"),
        (Finished::TemplateUploaded { local: s("l"), remote: s("r") }, "Uploaded template l -> r"),
        (Finished::TemplateDeleted { name: s("n") }, "Deleted template n"),
        (Finished::FirmwareUploaded { local: s("l") }, "Firmware update uploaded from l"),
        (Finished::Synchronised, "Sync completed"),
        (Finished::Paired { addr: s("a") }, "Pair succeeded for a"),
    ] {
        assert_eq!(finished.message(), line);
    }
    assert_eq!(debug_line("1", "probe", "x"), "[1] [probe] x\n");
    let capabilities = RustNativeProvider::detect_advanced_capabilities();
    assert!(!capabilities.apk_install_supported);
    assert_eq!(
        capabilities.apk_install_message,
        Some("Digital Paper devices do not expose APK install in the known HTTP API".to_string())
    );
}
