//! What the device's replies say of its documents, its state and its networks.
use crate::bytes::{base64_text, decode_base64_text};
use crate::domain::{
    entries, BatteryStatus, DeviceStatus, DeviceStatusView, RemoteEntry, RemoteEntryType,
    RemoteEntryView, StorageStatus, WifiNetwork, WifiNetworkView,
};
use crate::errors::{internal, outcome, ErrorView, RustProviderError};
use crate::json::{
    flag_member, json_value, json_values, list_member, owned_text, text_is, text_member,
    whole_member, JsonView,
};
use crate::numbers::{parse_number, parsed_number};
use crate::provider::RustNativeProvider;
use crate::paths::{
    basename, cut_at_the_last_slash, name_of, named_folder_is_unique, names_folder, parent_and_name,
    parent_of, parent_path, path_names_a_folder,
};
use crate::text::{cat3, same, strip_back, trim_end_of, CharClass};
use vstd::prelude::*;

verus! {

/// Where all entries of a device are listed.
pub const ALL_ENTRIES: &'static str = "/documents2?entry_type=all&fields=entry_path,entry_type,modified_date,file_size";

/// A number below a power of two out of a number without a bound.
pub open spec fn as_u64(n: Option<nat>) -> Option<u64> {
    match n {
        Some(n) => Some(n as u64),
        None => None,
    }
}

/// The type that an entry's type name stands for.
pub open spec fn entry_type_of(name: Option<Seq<char>>) -> RemoteEntryType {
    if name == Some("folder"@) {
        RemoteEntryType::Folder
    } else if name == Some("document"@) {
        RemoteEntryType::Document
    } else {
        RemoteEntryType::Unknown
    }
}

/// The size in a listing: a number, or decimal text.
pub open spec fn entry_size(entry: JsonView) -> Option<u64> {
    match entry.whole_at("file_size"@) {
        Some(size) => Some(size),
        None => match entry.text_at("file_size"@) {
            Some(text) => as_u64(parsed_number(text, u64::MAX as nat)),
            None => None,
        },
    }
}

/// An entry of a listing.
pub open spec fn remote_entry(entry: JsonView) -> RemoteEntryView {
    let path = match entry.text_at("entry_path"@) {
        Some(path) => path,
        None => Seq::empty(),
    };
    RemoteEntryView {
        path,
        name: name_of(path),
        entry_type: entry_type_of(entry.text_at("entry_type"@)),
        size: entry_size(entry),
        modified_at: entry.text_at("modified_date"@),
    }
}

/// Reads an entry of a listing.
pub fn map_remote_entry(entry: &serde_json::Value) -> (r: RemoteEntry)
    ensures
        r.deep_view() == remote_entry(json_value(*entry)),
{
    let path = match owned_text(entry, "entry_path") {
        Some(path) => path,
        None => {
            let none = String::new();
            assert(none@ =~= Seq::<char>::empty());
            none
        },
    };
    let name = basename(path.as_str());
    let entry_type = if text_is(entry, "entry_type", "folder") {
        RemoteEntryType::Folder
    } else if text_is(entry, "entry_type", "document") {
        RemoteEntryType::Document
    } else {
        RemoteEntryType::Unknown
    };
    let size = match whole_member(entry, "file_size") {
        Some(size) => Some(size),
        None => match text_member(entry, "file_size") {
            Some(text) => parse_number(text, u64::MAX),
            None => None,
        },
    };
    RemoteEntry { path, name, entry_type, size, modified_at: owned_text(entry, "modified_date") }
}

/// Whether an entry of a listing stands directly in the folder `path`.
pub open spec fn is_child(entry: JsonView, path: Seq<char>) -> bool {
    match entry.text_at("entry_path"@) {
        Some(entry_path) => entry_path != path && parent_of(entry_path) == strip_back(
            path,
            CharClass::Only('/'),
        ),
        None => false,
    }
}

/// The entries of a listing that stand directly in the folder `path`, in order.
pub open spec fn children(list: Seq<JsonView>, path: Seq<char>) -> Seq<RemoteEntryView>
    decreases list.len(),
{
    if list.len() == 0 {
        Seq::empty()
    } else {
        let before = children(list.drop_last(), path);
        if is_child(list.last(), path) {
            before.push(remote_entry(list.last()))
        } else {
            before
        }
    }
}

/// All entries of a listing, in order.
pub open spec fn all_entries(list: Seq<JsonView>) -> Seq<RemoteEntryView> {
    list.map_values(|e: JsonView| remote_entry(e))
}

/// The documents among entries, in order.
pub open spec fn documents(list: Seq<RemoteEntryView>) -> Seq<RemoteEntryView> {
    list.filter(|e: RemoteEntryView| e.entry_type == RemoteEntryType::Document)
}

impl RustNativeProvider {
    /// The entries of a listing that stand directly in the folder `path`.
    pub fn list_entries(value: &serde_json::Value, path: &str) -> (r: Vec<RemoteEntry>)
        ensures
            entries(r@) == children(json_value(*value).list_at("entry_list"@), path@),
    {
        let list = list_member(value, "entry_list");
        let ghost all = json_values(list@);
        let folder = trim_end_of(path, '/');
        let mut out: Vec<RemoteEntry> = Vec::new();
        proof {
            assert(all.take(0) =~= Seq::<JsonView>::empty());
            assert(entries(out@) =~= children(all.take(0), path@));
        }
        for i in 0..list.len()
            invariant
                all == json_values(list@),
                folder@ == strip_back(path@, CharClass::Only('/')),
                entries(out@) == children(all.take(i as int), path@),
        {
            let ghost was = entries(out@);
            proof {
                assert(all.take(i + 1).drop_last() =~= all.take(i as int));
                assert(all.take(i + 1).last() == json_value(list@[i as int]));
            }
            if let Some(entry_path) = text_member(&list[i], "entry_path") {
                if !same(entry_path, path) && same(parent_path(entry_path).as_str(), folder.as_str()) {
                    let entry = map_remote_entry(&list[i]);
                    out.push(entry);
                    assert(entries(out@) =~= was.push(entry.deep_view()));
                }
            }
        }
        assert(all.take(all.len() as int) =~= all);
        out
    }
}

impl RustNativeProvider {
    /// All entries of a listing.
    pub fn list_all_entries(value: &serde_json::Value) -> (r: Vec<RemoteEntry>)
        ensures
            entries(r@) == all_entries(json_value(*value).list_at("entry_list"@)),
    {
        let list = list_member(value, "entry_list");
        let ghost all = json_values(list@);
        let mut out: Vec<RemoteEntry> = Vec::new();
        assert(entries(out@) =~= all_entries(all.take(0)));
        for i in 0..list.len()
            invariant
                all == json_values(list@),
                entries(out@) == all_entries(all.take(i as int)),
        {
            let ghost was = entries(out@);
            let entry = map_remote_entry(&list[i]);
            out.push(entry);
            assert(entries(out@) =~= was.push(entry.deep_view()));
            assert(entries(out@) =~= all_entries(all.take(i + 1)));
        }
        assert(all.take(all.len() as int) =~= all);
        out
    }
}

impl RustNativeProvider {
    /// The documents among entries.
    pub fn list_document_entries(list: Vec<RemoteEntry>) -> (r: Vec<RemoteEntry>)
        ensures
            entries(r@) == documents(entries(list@)),
    {
        let ghost all = entries(list@);
        let mut out: Vec<RemoteEntry> = Vec::new();
        let ghost keep = |e: RemoteEntryView| e.entry_type == RemoteEntryType::Document;
        proof {
            reveal(Seq::filter);
            assert(all.take(0) =~= Seq::<RemoteEntryView>::empty());
            assert(entries(out@) =~= documents(all.take(0)));
        }
        for i in 0..list.len()
            invariant
                all == entries(list@),
                keep == (|e: RemoteEntryView| e.entry_type == RemoteEntryType::Document),
                entries(out@) == all.take(i as int).filter(keep),
        {
            let ghost was = entries(out@);
            proof {
                reveal(Seq::filter);
                assert(all.take(i + 1).drop_last() =~= all.take(i as int));
                assert(all.take(i + 1).last() == list@[i as int].deep_view());
            }
            if list[i].entry_type == RemoteEntryType::Document {
                let copied = list[i].clone();
                assert(copied.deep_view() == list@[i as int].deep_view());
                out.push(copied);
                assert(entries(out@) =~= was.push(copied.deep_view()));
            }
        }
        assert(all.take(all.len() as int) =~= all);
        out
    }
}

/// What is listed of a folder stands in it, and is not the folder itself.
pub proof fn listed_entries_are_children(list: Seq<JsonView>, path: Seq<char>, i: int)
    requires
        0 <= i < children(list, path).len(),
    ensures
        parent_of(children(list, path)[i].path) == strip_back(path, CharClass::Only('/')),
        children(list, path)[i].path != path,
        children(list, path)[i].name == name_of(children(list, path)[i].path),
    decreases list.len(),
{
    let before = children(list.drop_last(), path);
    if i < before.len() {
        listed_entries_are_children(list.drop_last(), path, i);
    }
}

/// Whatever stands in a folder is listed of it.
pub proof fn children_are_listed(list: Seq<JsonView>, path: Seq<char>, i: int)
    requires
        0 <= i < list.len(),
        is_child(list[i], path),
    ensures
        children(list, path).contains(remote_entry(list[i])),
    decreases list.len(),
{
    let before = children(list.drop_last(), path);
    let all = children(list, path);
    if i == list.len() - 1 {
        assert(all[all.len() - 1] == remote_entry(list[i]));
    } else {
        children_are_listed(list.drop_last(), path, i);
        let k = choose|k: int| 0 <= k < before.len() && before[k] == remote_entry(list[i]);
        assert(all[k] == before[k]);
    }
}

/// Whether an entry's path is the folder that `path` names, a slash and a name
/// without slashes; at the top, the name alone too.
pub open spec fn is_in_folder(
    entry_path: Seq<char>,
    path: Seq<char>,
    folder: Seq<char>,
    name: Seq<char>,
) -> bool {
    &&& names_folder(path, folder)
    &&& !name.contains('/')
    &&& entry_path == folder + seq!['/'] + name || (folder.len() == 0 && entry_path == name)
}

/// Whether an entry's path stands directly in the folder that `path` names, and is
/// not `path` itself.
pub open spec fn stands_directly_in(entry_path: Seq<char>, path: Seq<char>) -> bool {
    entry_path != path && exists|folder: Seq<char>, name: Seq<char>| #[trigger]
        is_in_folder(entry_path, path, folder, name)
}

/// An item of a listing is taken for one of a folder exactly where its path says so.
proof fn children_stand_directly_in(item: JsonView, path: Seq<char>)
    ensures
        is_child(item, path) <==> (item.text_at("entry_path"@) matches Some(entry_path)
            && stands_directly_in(entry_path, path)),
{
    if let Some(entry_path) = item.text_at("entry_path"@) {
        let base = strip_back(path, CharClass::Only('/'));
        path_names_a_folder(path);
        parent_and_name(entry_path);
        if is_child(item, path) {
            let name = name_of(entry_path);
            if entry_path.contains('/') {
                assert(entry_path =~= base + seq!['/'] + name);
            }
            assert(is_in_folder(entry_path, path, base, name));
        }
        if stands_directly_in(entry_path, path) {
            let (folder, name) = choose|folder: Seq<char>, name: Seq<char>| #[trigger]
                is_in_folder(entry_path, path, folder, name);
            named_folder_is_unique(path, base, folder);
            cut_at_the_last_slash(folder, name);
            assert(parent_of(entry_path) =~= folder);
        }
    }
}

/// A folder's listing is made of the items of the device's listing whose paths
/// stand directly in it, all of them, in the device's order.
pub proof fn folder_lists_what_stands_in_it(list: Seq<JsonView>, path: Seq<char>)
    ensures
        children(list, path) == list.filter(
            |item: JsonView| item.text_at("entry_path"@) matches Some(entry_path)
                && stands_directly_in(entry_path, path),
        ).map_values(|item: JsonView| remote_entry(item)),
    decreases list.len(),
{
    let keep = |item: JsonView| item.text_at("entry_path"@) matches Some(entry_path)
        && stands_directly_in(entry_path, path);
    let read = |item: JsonView| remote_entry(item);
    reveal(Seq::filter);
    if list.len() > 0 {
        folder_lists_what_stands_in_it(list.drop_last(), path);
        children_stand_directly_in(list.last(), path);
        let before = list.drop_last().filter(keep);
        assert(keep(list.last()) == is_child(list.last(), path));
        if keep(list.last()) {
            assert(list.filter(keep) == before.push(list.last()));
            assert(before.push(list.last()).map_values(read) =~= before.map_values(read).push(
                read(list.last()),
            ));
        } else {
            assert(list.filter(keep) == before);
        }
    }
    assert(children(list, path) =~= list.filter(keep).map_values(read));
}

/// Whatever the device lists at a folder's path, a slash and a name is in the
/// folder's listing under that path and name.
pub proof fn entry_in_a_folder_is_listed(
    list: Seq<JsonView>,
    i: int,
    path: Seq<char>,
    folder: Seq<char>,
    name: Seq<char>,
)
    requires
        0 <= i < list.len(),
        list[i].text_at("entry_path"@) == Some(folder + seq!['/'] + name),
        names_folder(path, folder),
        !name.contains('/'),
        folder + seq!['/'] + name != path,
    ensures
        exists|k: int|
            0 <= k < children(list, path).len() && (#[trigger] children(list, path)[k]).path
                == folder + seq!['/'] + name && children(list, path)[k].name == name,
{
    assert(is_in_folder(folder + seq!['/'] + name, path, folder, name));
    children_stand_directly_in(list[i], path);
    children_are_listed(list, path, i);
    cut_at_the_last_slash(folder, name);
    let all = children(list, path);
    let k = choose|k: int| 0 <= k < all.len() && all[k] == remote_entry(list[i]);
    assert(all[k].name == name);
}

/// A folder has the same listing however many slashes it is written with, as long
/// as no path on the device ends in a slash.
pub proof fn slashes_do_not_change_a_listing(
    list: Seq<JsonView>,
    a: Seq<char>,
    b: Seq<char>,
    folder: Seq<char>,
)
    requires
        names_folder(a, folder),
        names_folder(b, folder),
        folder.len() > 0,
        forall|i: int|
            #![trigger list[i]]
            0 <= i < list.len() ==> (list[i].text_at("entry_path"@) matches Some(entry_path)
                ==> entry_path.len() > 0 && entry_path.last() != '/'),
    ensures
        children(list, a) == children(list, b),
    decreases list.len(),
{
    if list.len() > 0 {
        let init = list.drop_last();
        assert forall|i: int| #![trigger init[i]] 0 <= i < init.len() implies (init[i].text_at(
            "entry_path"@,
        ) matches Some(entry_path) ==> entry_path.len() > 0 && entry_path.last() != '/') by {
            assert(init[i] == list[i]);
        }
        slashes_do_not_change_a_listing(init, a, b, folder);
        let item = list[list.len() - 1];
        children_stand_directly_in(item, a);
        children_stand_directly_in(item, b);
        if let Some(entry_path) = item.text_at("entry_path"@) {
            if stands_directly_in(entry_path, a) {
                slashes_do_not_change_a_place(entry_path, a, b, folder);
            }
            if stands_directly_in(entry_path, b) {
                slashes_do_not_change_a_place(entry_path, b, a, folder);
            }
        }
    }
}

proof fn slashes_do_not_change_a_place(
    entry_path: Seq<char>,
    a: Seq<char>,
    b: Seq<char>,
    folder: Seq<char>,
)
    requires
        names_folder(a, folder),
        names_folder(b, folder),
        folder.len() > 0,
        entry_path.len() > 0,
        entry_path.last() != '/',
        stands_directly_in(entry_path, a),
    ensures
        stands_directly_in(entry_path, b),
{
    let (f, name) = choose|f: Seq<char>, name: Seq<char>| #[trigger]
        is_in_folder(entry_path, a, f, name);
    named_folder_is_unique(a, f, folder);
    assert(is_in_folder(entry_path, b, folder, name));
    if entry_path == b {
        assert(entry_path.len() > folder.len());
        assert(b[b.len() - 1] == '/');
    }
}

/// An entry is what its item says: its path and the last part of it, its kind, its
/// size, whether a number or digits, and when it was changed.
pub proof fn entry_says_what_its_item_says(
    item: JsonView,
    folder: Seq<char>,
    name: Seq<char>,
    size: u64,
)
    requires
        !name.contains('/'),
        item.text_at("entry_path"@) == Some(folder + seq!['/'] + name),
    ensures
        remote_entry(item).path == folder + seq!['/'] + name,
        remote_entry(item).name == name,
        remote_entry(item).modified_at == item.text_at("modified_date"@),
        item.text_at("entry_type"@) == Some("folder"@) <==> remote_entry(item).entry_type
            == RemoteEntryType::Folder,
        item.text_at("entry_type"@) == Some("document"@) <==> remote_entry(item).entry_type
            == RemoteEntryType::Document,
        item.whole_at("file_size"@) == Some(size) ==> remote_entry(item).size == Some(size),
        item.whole_at("file_size"@) is None && item.text_at("file_size"@) == Some(
            crate::numbers::decimal(size as nat),
        ) ==> remote_entry(item).size == Some(size),
{
    cut_at_the_last_slash(folder, name);
    crate::numbers::number_roundtrip(size as nat, u64::MAX as nat);
    reveal_strlit("folder");
    reveal_strlit("document");
    assert("folder"@.len() != "document"@.len());
}

/// The battery level in percent: a number of eight bits, or decimal text.
pub open spec fn battery_level(battery: JsonView) -> Option<u8> {
    match battery.whole_at("remain"@) {
        Some(level) if level <= 255 => Some(level as u8),
        _ => match battery.text_at("level"@) {
            Some(text) => match parsed_number(text, 255) {
                Some(level) => Some(level as u8),
                None => None,
            },
            None => None,
        },
    }
}

/// Reads the battery level in percent.
pub fn parse_battery_level(battery: &serde_json::Value) -> (r: Option<u8>)
    ensures
        r == battery_level(json_value(*battery)),
{
    if let Some(level) = whole_member(battery, "remain") {
        if level <= 255 {
            return Some(level as u8);
        }
    }
    match text_member(battery, "level") {
        Some(text) => match parse_number(text, 255) {
            Some(level) => Some(level as u8),
            None => None,
        },
        None => None,
    }
}

/// The state of a device as five replies tell it.
pub open spec fn device_status(
    battery: JsonView,
    storage: JsonView,
    firmware: JsonView,
    owner: JsonView,
    wifi: JsonView,
) -> DeviceStatusView {
    DeviceStatusView {
        battery: BatteryStatus {
            level_percent: battery_level(battery),
            charging: battery.text_at("status"@) == Some("charge"@) || battery.text_at("status"@)
                == Some("full"@) || battery.text_at("plugged"@) == Some("usb"@),
        },
        storage: StorageStatus {
            total_bytes: storage.whole_at("total"@),
            free_bytes: storage.whole_at("free"@),
        },
        firmware_version: firmware.text_at("value"@),
        owner: owner.text_at("value"@),
        wifi_enabled: wifi.text_at("value"@) == Some("on"@),
    }
}

/// Reads the state of a device out of its five replies.
pub fn status_of(
    battery: &serde_json::Value,
    storage: &serde_json::Value,
    firmware: &serde_json::Value,
    owner: &serde_json::Value,
    wifi: &serde_json::Value,
) -> (r: DeviceStatus)
    ensures
        r.deep_view() == device_status(
            json_value(*battery),
            json_value(*storage),
            json_value(*firmware),
            json_value(*owner),
            json_value(*wifi),
        ),
{
    DeviceStatus {
        battery: BatteryStatus {
            level_percent: parse_battery_level(battery),
            charging: text_is(battery, "status", "charge") || text_is(battery, "status", "full")
                || text_is(battery, "plugged", "usb"),
        },
        storage: StorageStatus {
            total_bytes: whole_member(storage, "total"),
            free_bytes: whole_member(storage, "free"),
        },
        firmware_version: owned_text(firmware, "value"),
        owner: owned_text(owner, "value"),
        wifi_enabled: text_is(wifi, "value", "on"),
    }
}

/// The text in member `value`, or the failure with the given message.
pub open spec fn value_or(value: JsonView, missing: Seq<char>) -> Result<Seq<char>, ErrorView> {
    match value.text_at("value"@) {
        Some(text) => Ok(text),
        None => Err(ErrorView::Internal(missing)),
    }
}

/// The text in member `value`, or the failure with the given message.
pub fn text_value_or(value: &serde_json::Value, missing: &str) -> (r: Result<
    String,
    RustProviderError,
>)
    ensures
        outcome(r) == value_or(json_value(*value), missing@),
{
    match owned_text(value, "value") {
        Some(text) => Ok(text),
        None => Err(internal(missing)),
    }
}

/// A network in a listing. Whether it is connected counts only where the
/// listing is of known networks.
pub open spec fn network(ap: JsonView, known: bool) -> WifiNetworkView {
    let ssid = match ap.text_at("ssid"@) {
        Some(text) => match base64_text(text) {
            Some(ssid) => ssid,
            None => Seq::empty(),
        },
        None => Seq::empty(),
    };
    let security = match ap.text_at("security"@) {
        Some(text) => text,
        None => Seq::empty(),
    };
    WifiNetworkView {
        id: Some(ssid + "|"@ + security),
        ssid,
        security,
        connected: known && (ap.text_at("connected"@) == Some("true"@) || ap.text_at("connected"@)
            == Some("on"@) || ap.flag_at("connected"@) == Some(true)),
    }
}

/// Reads a network in a listing.
fn read_network(ap: &serde_json::Value, known: bool) -> (r: WifiNetwork)
    ensures
        r.deep_view() == network(json_value(*ap), known),
{
    let none = String::new();
    assert(none@ =~= Seq::<char>::empty());
    let ssid = match text_member(ap, "ssid") {
        Some(text) => match decode_base64_text(text) {
            Some(ssid) => ssid,
            None => none.as_str().to_owned(),
        },
        None => none.as_str().to_owned(),
    };
    let security = match owned_text(ap, "security") {
        Some(text) => text,
        None => none,
    };
    let connected = known && (text_is(ap, "connected", "true") || text_is(ap, "connected", "on")
        || flag_member(ap, "connected") == Some(true));
    WifiNetwork {
        id: Some(cat3(ssid.as_str(), "|", security.as_str())),
        ssid,
        security,
        connected,
    }
}

/// The contents of networks.
pub open spec fn networks(list: Seq<WifiNetwork>) -> Seq<WifiNetworkView> {
    list.map_values(|n: WifiNetwork| n.deep_view())
}

/// The networks of a listing.
pub open spec fn network_list(list: Seq<JsonView>, known: bool) -> Seq<WifiNetworkView> {
    list.map_values(|ap: JsonView| network(ap, known))
}

fn read_networks(value: &serde_json::Value, known: bool) -> (r: Vec<WifiNetwork>)
    ensures
        networks(r@) == network_list(json_value(*value).list_at("aplist"@), known),
{
    let list = list_member(value, "aplist");
    let ghost all = json_values(list@);
    let mut out: Vec<WifiNetwork> = Vec::new();
    assert(networks(out@) =~= network_list(all.take(0), known));
    for i in 0..list.len()
        invariant
            all == json_values(list@),
            networks(out@) == network_list(all.take(i as int), known),
    {
        let ghost was = networks(out@);
        let ap = read_network(&list[i], known);
        out.push(ap);
        assert(networks(out@) =~= was.push(ap.deep_view()));
        assert(networks(out@) =~= network_list(all.take(i + 1), known));
    }
    assert(all.take(all.len() as int) =~= all);
    out
}

impl RustNativeProvider {
    /// The networks that a device knows.
    pub fn list_wifi(value: &serde_json::Value) -> (r: Vec<WifiNetwork>)
        ensures
            networks(r@) == network_list(json_value(*value).list_at("aplist"@), true),
    {
        read_networks(value, true)
    }
}

impl RustNativeProvider {
    /// The networks that a device sees; none counts as connected.
    pub fn scan_wifi(value: &serde_json::Value) -> (r: Vec<WifiNetwork>)
        ensures
            networks(r@) == network_list(json_value(*value).list_at("aplist"@), false),
    {
        read_networks(value, false)
    }
}

/// The identifier of the first template with the given name.
pub open spec fn template_id(list: Seq<JsonView>, name: Seq<char>) -> Option<Seq<char>>
    decreases list.len(),
{
    if list.len() == 0 {
        None
    } else if list[0].text_at("template_name"@) == Some(name) {
        list[0].text_at("note_template_id"@)
    } else {
        template_id(list.skip(1), name)
    }
}

/// Finds the identifier of the first template with the given name.
pub fn find_template(templates: &serde_json::Value, name: &str) -> (r: Option<String>)
    ensures
        r.deep_view() == template_id(json_value(*templates).list_at("template_list"@), name@),
{
    let list = list_member(templates, "template_list");
    let ghost all = json_values(list@);
    assert(all.skip(0) =~= all);
    for i in 0..list.len()
        invariant
            all == json_values(list@),
            all == json_value(*templates).list_at("template_list"@),
            template_id(all, name@) == template_id(all.skip(i as int), name@),
    {
        assert(all.skip(i as int)[0] == json_value(list@[i as int]));
        if text_is(&list[i], "template_name", name) {
            return owned_text(&list[i], "note_template_id");
        }
        assert(all.skip(i as int).skip(1) =~= all.skip(i + 1));
    }
    None
}

/// The state of a device is what its replies say: the battery's level as a number
/// or in digits, whether it charges, the storage in bytes, and the settings.
pub proof fn status_says_what_the_replies_say(
    battery: JsonView,
    storage: JsonView,
    firmware: JsonView,
    owner: JsonView,
    wifi: JsonView,
    level: u8,
)
    ensures
        ({
            let status = device_status(battery, storage, firmware, owner, wifi);
            &&& battery.whole_at("remain"@) == Some(level as u64) ==> status.battery.level_percent
                == Some(level)
            &&& battery.whole_at("remain"@) is None && battery.text_at("level"@) == Some(
                crate::numbers::decimal(level as nat),
            ) ==> status.battery.level_percent == Some(level)
            &&& battery.text_at("status"@) == Some("charge"@) ==> status.battery.charging
            &&& battery.text_at("status"@) == Some("full"@) ==> status.battery.charging
            &&& battery.text_at("plugged"@) == Some("usb"@) ==> status.battery.charging
            &&& battery.text_at("status"@) is None && battery.text_at("plugged"@) is None
                ==> !status.battery.charging
            &&& status.storage.total_bytes == storage.whole_at("total"@)
            &&& status.storage.free_bytes == storage.whole_at("free"@)
            &&& status.firmware_version == firmware.text_at("value"@)
            &&& status.owner == owner.text_at("value"@)
            &&& status.wifi_enabled <==> wifi.text_at("value"@) == Some("on"@)
        }),
{
    crate::numbers::number_roundtrip(level as nat, 255);
}

/// A network goes by its name out of base64 and its security; it counts as
/// connected only in a listing of known networks that says so.
pub proof fn network_says_what_its_item_says(ap: JsonView, known: bool)
    ensures
        ({
            let n = network(ap, known);
            &&& n.connected ==> known
            &&& ap.text_at("security"@) is Some ==> Some(n.security) == ap.text_at("security"@)
            &&& ap.text_at("ssid"@) is Some && base64_text(ap.text_at("ssid"@)->Some_0) is Some
                ==> Some(n.ssid) == base64_text(ap.text_at("ssid"@)->Some_0)
            &&& known && ap.text_at("connected"@) == Some("true"@) ==> n.connected
            &&& known && ap.flag_at("connected"@) == Some(true) ==> n.connected
            &&& ap.get("connected"@) is None ==> !n.connected
            &&& n.id == Some(n.ssid + "|"@ + n.security)
        }),
{
}

/// A template's identifier is that of the first one with exactly the name.
pub proof fn template_is_found_by_its_name(list: Seq<JsonView>, name: Seq<char>, i: int)
    requires
        0 <= i < list.len(),
        list[i].text_at("template_name"@) == Some(name),
        forall|k: int|
            0 <= k < i ==> (#[trigger] list[k]).text_at("template_name"@) != Some(name),
    ensures
        template_id(list, name) == list[i].text_at("note_template_id"@),
    decreases i,
{
    if i > 0 {
        let rest = list.skip(1);
        assert forall|k: int| 0 <= k < i - 1 implies (#[trigger] rest[k]).text_at(
            "template_name"@,
        ) != Some(name) by {
            assert(rest[k] == list[k + 1]);
        }
        assert(rest[i - 1] == list[i]);
        assert(list[0].text_at("template_name"@) != Some(name));
        template_is_found_by_its_name(rest, name, i - 1);
    }
}

/// A name that no template has gives none.
pub proof fn unknown_template_is_not_found(list: Seq<JsonView>, name: Seq<char>)
    requires
        forall|k: int|
            0 <= k < list.len() ==> (#[trigger] list[k]).text_at("template_name"@) != Some(name),
    ensures
        template_id(list, name) is None,
    decreases list.len(),
{
    if list.len() > 0 {
        let rest = list.skip(1);
        assert forall|k: int| 0 <= k < rest.len() implies (#[trigger] rest[k]).text_at(
            "template_name"@,
        ) != Some(name) by {
            assert(rest[k] == list[k + 1]);
        }
        assert(list[0].text_at("template_name"@) != Some(name));
        unknown_template_is_not_found(rest, name);
    }
}

/// The documents of a listing are exactly its entries that are documents.
pub proof fn documents_are_kept(list: Seq<RemoteEntryView>, entry: RemoteEntryView)
    ensures
        documents(list).contains(entry) <==> list.contains(entry) && entry.entry_type
            == RemoteEntryType::Document,
{
    let keep = |e: RemoteEntryView| e.entry_type == RemoteEntryType::Document;
    let kept = list.filter(keep);
    if list.contains(entry) && keep(entry) {
        let i = choose|i: int| 0 <= i < list.len() && list[i] == entry;
        list.lemma_filter_contains(keep, i);
    }
    if kept.contains(entry) {
        let i = choose|i: int| 0 <= i < kept.len() && kept[i] == entry;
        list.lemma_filter_pred(keep, i);
        list.lemma_filter_contains_rev(keep, entry);
    }
}

} // verus!
