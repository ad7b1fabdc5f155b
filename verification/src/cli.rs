//! What the command line tool decides and reports.
use crate::discovery::summaries;
use crate::domain::{DeviceSummary, DeviceSummaryView};
use crate::json::{
    copy_value, empty_object, flag_value, json_parsed, json_value, json_values, no_fields,
    number_value, parse_value, put_text, set_member, value_list, JsonView,
};
use crate::numbers::decimal;
use crate::text::{cat2, same_option};
use vstd::prelude::*;
use vstd::string::*;

verus! {

/// What a command has done, as reported to the user.
pub enum Report {
    Validated { path: String },
    PairBegun { addr: String },
    Exists { path: String, exists: bool },
    IsFolder { path: String, is_folder: bool },
    FolderCreated { path: String },
    Renamed { path: String, new_name: String },
    Moved { src: String, dst: String },
    Copied { src: String, dst: String },
    Deleted { path: String },
    Uploaded { local: String, remote: String },
    Downloaded { remote: String, local: String },
    Text { value: String },
    WifiAdded { ssid: String, security: String },
    WifiRemoved { ssid: String, security: String },
    WifiToggled { enabled: bool },
    Config { key: String, value: serde_json::Value },
    ConfigSet { key: String, value: serde_json::Value },
    ConfigFile { path: String },
    DatetimeSet,
    TemplateUploaded { local: String, remote: String },
    TemplateDeleted { name: String },
    DocumentShown { document_id: String, page: u32 },
    Screenshot { path: String, bytes: usize },
    Ping { ok: bool },
    FirmwareUpdated { local: String },
}

/// An object with two members.
pub open spec fn pair_of(
    a: Seq<char>,
    x: JsonView,
    b: Seq<char>,
    y: JsonView,
) -> Map<Seq<char>, JsonView> {
    no_fields().insert(a, x).insert(b, y)
}

/// The members that tell that an action was done.
pub open spec fn done(action: Seq<char>) -> Map<Seq<char>, JsonView> {
    no_fields().insert("ok"@, JsonView::Bool(true)).insert("action"@, JsonView::Text(action))
}

impl Report {
    /// The members of the report.
    pub open spec fn fields(&self) -> Map<Seq<char>, JsonView> {
        match self {
            Report::Validated { path } => done("validate_access"@).insert(
                "path"@,
                JsonView::Text(path@),
            ),
            Report::PairBegun { addr } => pair_of(
                "ok"@,
                JsonView::Bool(true),
                "message"@,
                JsonView::Text("PIN should now be visible on the DPT."@),
            ).insert("addr"@, JsonView::Text(addr@)),
            Report::Exists { path, exists: found } => pair_of(
                "path"@,
                JsonView::Text(path@),
                "exists"@,
                JsonView::Bool(*found),
            ),
            Report::IsFolder { path, is_folder } => pair_of(
                "path"@,
                JsonView::Text(path@),
                "isFolder"@,
                JsonView::Bool(*is_folder),
            ),
            Report::FolderCreated { path } => done("create_folder"@).insert(
                "path"@,
                JsonView::Text(path@),
            ),
            Report::Renamed { path, new_name } => done("rename"@).insert(
                "path"@,
                JsonView::Text(path@),
            ).insert("newName"@, JsonView::Text(new_name@)),
            Report::Moved { src, dst } => done("move"@).insert("src"@, JsonView::Text(src@)).insert(
                "dst"@,
                JsonView::Text(dst@),
            ),
            Report::Copied { src, dst } => done("copy"@).insert("src"@, JsonView::Text(src@)).insert(
                "dst"@,
                JsonView::Text(dst@),
            ),
            Report::Deleted { path } => done("delete"@).insert("path"@, JsonView::Text(path@)),
            Report::Uploaded { local, remote } => done("upload"@).insert(
                "localPath"@,
                JsonView::Text(local@),
            ).insert("remotePath"@, JsonView::Text(remote@)),
            Report::Downloaded { remote, local } => done("download"@).insert(
                "remotePath"@,
                JsonView::Text(remote@),
            ).insert("localPath"@, JsonView::Text(local@)),
            Report::Text { value } => no_fields().insert("value"@, JsonView::Text(value@)),
            Report::WifiAdded { ssid, security } => done("add_wifi"@).insert(
                "ssid"@,
                JsonView::Text(ssid@),
            ).insert("security"@, JsonView::Text(security@)),
            Report::WifiRemoved { ssid, security } => done("remove_wifi"@).insert(
                "ssid"@,
                JsonView::Text(ssid@),
            ).insert("security"@, JsonView::Text(security@)),
            Report::WifiToggled { enabled } => pair_of(
                "ok"@,
                JsonView::Bool(true),
                "enabled"@,
                JsonView::Bool(*enabled),
            ),
            Report::Config { key, value } => pair_of(
                "key"@,
                JsonView::Text(key@),
                "value"@,
                json_value(*value),
            ),
            Report::ConfigSet { key, value } => done("config_set"@).insert(
                "key"@,
                JsonView::Text(key@),
            ).insert("value"@, json_value(*value)),
            Report::ConfigFile { path } => pair_of(
                "ok"@,
                JsonView::Bool(true),
                "path"@,
                JsonView::Text(path@),
            ),
            Report::DatetimeSet => done("set_datetime"@),
            Report::TemplateUploaded { local, remote } => done("upload_template"@).insert(
                "localPath"@,
                JsonView::Text(local@),
            ).insert("remotePath"@, JsonView::Text(remote@)),
            Report::TemplateDeleted { name } => done("delete_template"@).insert(
                "templateName"@,
                JsonView::Text(name@),
            ),
            Report::DocumentShown { document_id, page } => done("display_document"@).insert(
                "documentId"@,
                JsonView::Text(document_id@),
            ).insert("page"@, JsonView::Number(Some(*page as u64), decimal(*page as nat))),
            Report::Screenshot { path, bytes } => pair_of(
                "ok"@,
                JsonView::Bool(true),
                "outputPath"@,
                JsonView::Text(path@),
            ).insert("bytes"@, JsonView::Number(Some(*bytes as u64), decimal(*bytes as nat))),
            Report::Ping { ok } => no_fields().insert("ok"@, JsonView::Bool(*ok)),
            Report::FirmwareUpdated { local } => done("update_firmware"@).insert(
                "localPath"@,
                JsonView::Text(local@),
            ),
        }
    }

    /// The report as a JSON tree.
    pub fn value(&self) -> (r: serde_json::Value)
        ensures
            json_value(r) == JsonView::Object(self.fields()),
    {
        match self {
            Report::Validated { path } => action1("validate_access", "path", path.as_str()),
            Report::PairBegun { addr } => {
                let mut v = flagged("ok", true);
                put_text(&mut v, "message", "PIN should now be visible on the DPT.");
                put_text(&mut v, "addr", addr.as_str());
                v
            },
            Report::Exists { path, exists: found } => {
                let mut v = empty_object();
                put_text(&mut v, "path", path.as_str());
                set_member(&mut v, "exists", flag_value(*found));
                v
            },
            Report::IsFolder { path, is_folder } => {
                let mut v = empty_object();
                put_text(&mut v, "path", path.as_str());
                set_member(&mut v, "isFolder", flag_value(*is_folder));
                v
            },
            Report::FolderCreated { path } => action1("create_folder", "path", path.as_str()),
            Report::Renamed { path, new_name } => action2(
                "rename",
                "path",
                path.as_str(),
                "newName",
                new_name.as_str(),
            ),
            Report::Moved { src, dst } => action2(
                "move",
                "src",
                src.as_str(),
                "dst",
                dst.as_str(),
            ),
            Report::Copied { src, dst } => action2(
                "copy",
                "src",
                src.as_str(),
                "dst",
                dst.as_str(),
            ),
            Report::Deleted { path } => action1("delete", "path", path.as_str()),
            Report::Uploaded { local, remote } => action2(
                "upload",
                "localPath",
                local.as_str(),
                "remotePath",
                remote.as_str(),
            ),
            Report::Downloaded { remote, local } => action2(
                "download",
                "remotePath",
                remote.as_str(),
                "localPath",
                local.as_str(),
            ),
            Report::Text { value } => {
                let mut v = empty_object();
                put_text(&mut v, "value", value.as_str());
                v
            },
            Report::WifiAdded { ssid, security } => action2(
                "add_wifi",
                "ssid",
                ssid.as_str(),
                "security",
                security.as_str(),
            ),
            Report::WifiRemoved { ssid, security } => action2(
                "remove_wifi",
                "ssid",
                ssid.as_str(),
                "security",
                security.as_str(),
            ),
            Report::WifiToggled { enabled } => {
                let mut v = flagged("ok", true);
                set_member(&mut v, "enabled", flag_value(*enabled));
                v
            },
            Report::Config { key, value } => {
                let mut v = empty_object();
                put_text(&mut v, "key", key.as_str());
                set_member(&mut v, "value", copy_value(value));
                v
            },
            Report::ConfigSet { key, value } => {
                let mut v = action1("config_set", "key", key.as_str());
                set_member(&mut v, "value", copy_value(value));
                v
            },
            Report::ConfigFile { path } => {
                let mut v = flagged("ok", true);
                put_text(&mut v, "path", path.as_str());
                v
            },
            Report::DatetimeSet => action("set_datetime"),
            Report::TemplateUploaded { local, remote } => action2(
                "upload_template",
                "localPath",
                local.as_str(),
                "remotePath",
                remote.as_str(),
            ),
            Report::TemplateDeleted { name } => action1(
                "delete_template",
                "templateName",
                name.as_str(),
            ),
            Report::DocumentShown { document_id, page } => {
                let mut v = action1("display_document", "documentId", document_id.as_str());
                set_member(&mut v, "page", number_value(*page as u64));
                v
            },
            Report::Screenshot { path, bytes } => {
                let mut v = flagged("ok", true);
                put_text(&mut v, "outputPath", path.as_str());
                set_member(&mut v, "bytes", number_value(*bytes as u64));
                v
            },
            Report::Ping { ok } => flagged("ok", *ok),
            Report::FirmwareUpdated { local } => action1(
                "update_firmware",
                "localPath",
                local.as_str(),
            ),
        }
    }
}

fn flagged(key: &str, flag: bool) -> (r: serde_json::Value)
    ensures
        json_value(r) == JsonView::Object(no_fields().insert(key@, JsonView::Bool(flag))),
{
    let mut v = empty_object();
    set_member(&mut v, key, flag_value(flag));
    v
}

fn action(name: &str) -> (r: serde_json::Value)
    ensures
        json_value(r) == JsonView::Object(done(name@)),
{
    let mut v = flagged("ok", true);
    put_text(&mut v, "action", name);
    v
}

fn action1(name: &str, key: &str, text: &str) -> (r: serde_json::Value)
    ensures
        json_value(r) == JsonView::Object(done(name@).insert(key@, JsonView::Text(text@))),
{
    let mut v = action(name);
    put_text(&mut v, key, text);
    v
}

fn action2(name: &str, key1: &str, text1: &str, key2: &str, text2: &str) -> (r: serde_json::Value)
    ensures
        json_value(r) == JsonView::Object(
            done(name@).insert(key1@, JsonView::Text(text1@)).insert(key2@, JsonView::Text(text2@)),
        ),
{
    let mut v = action1(name, key1, text1);
    put_text(&mut v, key2, text2);
    v
}

/// The trees that are printed one after the other where no JSON was asked for:
/// the items of a list, or the one tree.
pub open spec fn human_items(value: JsonView) -> Seq<JsonView> {
    match value {
        JsonView::List(items) => items,
        _ => seq![value],
    }
}

/// The trees that are printed one after the other where no JSON was asked for.
pub fn print_human(value: &serde_json::Value) -> (r: Vec<serde_json::Value>)
    ensures
        json_values(r@) == human_items(json_value(*value)),
{
    let mut out: Vec<serde_json::Value> = Vec::new();
    match value_list(value) {
        Some(list) => {
            for i in 0..list.len()
                invariant
                    out@.len() == i,
                    forall|k: int|
                        0 <= k < i ==> json_value(#[trigger] out@[k]) == json_value(list@[k]),
            {
                out.push(copy_value(&list[i]));
            }
            assert(json_values(out@) =~= json_values(list@));
        },
        None => {
            out.push(copy_value(value));
            assert(json_values(out@) =~= seq![json_value(*value)]);
        },
    }
    out
}

/// The devices that are shown: all, or those with the given serial number.
pub open spec fn shown_devices(
    devices: Seq<DeviceSummaryView>,
    serial: Option<Seq<char>>,
) -> Seq<DeviceSummaryView> {
    match serial {
        None => devices,
        Some(serial) => devices.filter(|d: DeviceSummaryView| d.serial == Some(serial)),
    }
}

/// Leaves the devices that are shown.
pub fn retain_serial(devices: Vec<DeviceSummary>, serial: &Option<String>) -> (r: Vec<
    DeviceSummary,
>)
    ensures
        summaries(r@) == shown_devices(summaries(devices@), serial.deep_view()),
{
    let wanted = match serial {
        None => {
            return devices;
        },
        Some(serial) => serial,
    };
    let ghost all = summaries(devices@);
    let ghost keep = |d: DeviceSummaryView| d.serial == Some(wanted@);
    let mut out: Vec<DeviceSummary> = Vec::new();
    proof {
        reveal(Seq::filter);
        assert(all.take(0) =~= Seq::<DeviceSummaryView>::empty());
        assert(summaries(out@) =~= all.take(0).filter(keep));
    }
    for i in 0..devices.len()
        invariant
            all == summaries(devices@),
            keep == (|d: DeviceSummaryView| d.serial == Some(wanted@)),
            summaries(out@) == all.take(i as int).filter(keep),
    {
        let ghost was = summaries(out@);
        proof {
            reveal(Seq::filter);
            assert(all.take(i + 1).drop_last() =~= all.take(i as int));
            assert(all.take(i + 1).last() == devices@[i as int].deep_view());
        }
        if same_option(&devices[i].serial, wanted.as_str()) {
            let device = devices[i].clone();
            assert(device.deep_view() == devices@[i as int].deep_view());
            out.push(device);
            assert(summaries(out@) =~= was.push(device.deep_view()));
        }
    }
    assert(all.take(all.len() as int) =~= all);
    out
}

/// Where a file goes: to the given path, else under its name, or a made-up one
/// where it has none, into the top folder for documents.
pub open spec fn upload_place(remote: Option<Seq<char>>, name: Option<Seq<char>>) -> Seq<char> {
    match remote {
        Some(remote) => remote,
        None => "Document/"@ + match name {
            Some(name) => name,
            None => "upload.pdf"@,
        },
    }
}

/// Where a file goes.
pub fn upload_default(remote: Option<String>, local_name: &Option<String>) -> (r: String)
    ensures
        r@ == upload_place(remote.deep_view(), local_name.deep_view()),
{
    match remote {
        Some(remote) => remote,
        None => match local_name {
            Some(name) => cat2("Document/", name.as_str()),
            None => cat2("Document/", "upload.pdf"),
        },
    }
}

/// The commands of the tool.
#[derive(Debug, Clone, Copy, PartialEq, Eq, Structural)]
pub enum CommandKind {
    Discover,
    Validate,
    Connect,
    UsbStatus,
    UsbSwitch,
    UsbRecover,
    Pair,
    PairBegin,
    PairFinish,
    Info,
    List,
    ListAll,
    ListDocuments,
    Stat,
    Find,
    Exists,
    IsFolder,
    Mkdir,
    Rename,
    Move,
    Copy,
    Delete,
    Upload,
    Download,
    Sync,
    RegisterInfo,
    Battery,
    FirmwareVersion,
    MacAddress,
    ApiVersion,
    ListWifi,
    ScanWifi,
    AddWifi,
    RemoveWifi,
    EnableWifi,
    DisableWifi,
    ConfigGet,
    ConfigSet,
    GetConfiguration,
    SetConfiguration,
    SetDatetime,
    ListTemplates,
    UploadTemplate,
    DeleteTemplate,
    DisplayDocument,
    Screenshot,
    Ping,
    UpdateFirmware,
    ImportCredentials,
    Capabilities,
    Logs,
}

/// Whether a command works without a device, finds one itself, or talks to one
/// before any login.
pub open spec fn needs_no_session(kind: CommandKind) -> bool {
    ||| kind is Discover
    ||| kind is Connect
    ||| kind is UsbStatus
    ||| kind is UsbSwitch
    ||| kind is UsbRecover
    ||| kind is PairBegin
    ||| kind is PairFinish
    ||| kind is RegisterInfo
    ||| kind is ApiVersion
    ||| kind is ImportCredentials
    ||| kind is Capabilities
}

/// Why the text of a file is of no use: a message that names the file, and the cause.
pub struct FileFailure {
    pub message: String,
    pub cause: String,
}

/// Reads the text of a configuration file.
pub fn read_configuration(text: &str, path: &str) -> (r: Result<serde_json::Value, FileFailure>)
    ensures
        match r {
            Ok(value) => json_parsed(text@) is Ok && json_parsed(text@)->Ok_0 == json_value(value),
            Err(e) => json_parsed(text@) is Err && json_parsed(text@)->Err_0 == e.cause@
                && e.message@ == "invalid JSON in "@ + path@,
        },
{
    match parse_value(text) {
        Ok(value) => Ok(value),
        Err(cause) => Err(FileFailure { message: cat2("invalid JSON in ", path), cause }),
    }
}

/// Whether a command is preceded by a connection: those that work on a device's
/// content or settings are, and the log is where an address was given.
pub open spec fn is_preceded(kind: CommandKind, addr_given: bool) -> bool {
    if kind is Logs {
        addr_given
    } else {
        !needs_no_session(kind)
    }
}

/// Whether a command is preceded by a connection.
pub fn ensure_connected(kind: CommandKind, addr_given: bool) -> (r: bool)
    ensures
        r == is_preceded(kind, addr_given),
{
    match kind {
        CommandKind::Logs => addr_given,
        CommandKind::Discover => false,
        CommandKind::Connect => false,
        CommandKind::UsbStatus => false,
        CommandKind::UsbSwitch => false,
        CommandKind::UsbRecover => false,
        CommandKind::PairBegin => false,
        CommandKind::PairFinish => false,
        CommandKind::RegisterInfo => false,
        CommandKind::ApiVersion => false,
        CommandKind::ImportCredentials => false,
        CommandKind::Capabilities => false,
        _ => true,
    }
}

/// The devices that are shown are all there are, or exactly those with the given
/// serial number.
pub proof fn devices_with_the_serial_are_shown(
    devices: Seq<DeviceSummaryView>,
    serial: Seq<char>,
    device: DeviceSummaryView,
)
    ensures
        shown_devices(devices, None) == devices,
        shown_devices(devices, Some(serial)).contains(device) <==> devices.contains(device)
            && device.serial == Some(serial),
{
    let keep = |d: DeviceSummaryView| d.serial == Some(serial);
    let shown = devices.filter(keep);
    if devices.contains(device) && device.serial == Some(serial) {
        let i = choose|i: int| 0 <= i < devices.len() && devices[i] == device;
        devices.lemma_filter_contains(keep, i);
    }
    if shown.contains(device) {
        let i = choose|i: int| 0 <= i < shown.len() && shown[i] == device;
        devices.lemma_filter_pred(keep, i);
        devices.lemma_filter_contains_rev(keep, device);
    }
}

/// A file goes where it is told to go, else into the top folder under its name.
pub proof fn upload_goes_where_it_is_told(remote: Seq<char>, name: Seq<char>, local: Option<Seq<char>>)
    requires
        !name.contains('/'),
    ensures
        upload_place(Some(remote), local) == remote,
        crate::paths::name_of(upload_place(None, Some(name))) == name,
        crate::paths::parent_of(upload_place(None, Some(name))) == "Document"@,
{
    reveal_strlit("Document/");
    reveal_strlit("Document");
    assert("Document/"@ =~= "Document"@ + seq!['/']);
    assert(upload_place(None, Some(name)) =~= "Document"@ + seq!['/'] + name);
    crate::paths::cut_at_the_last_slash("Document"@, name);
}

} // verus!
